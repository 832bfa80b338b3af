//! The active-runway file: one line for each airport and role.
//!
//! A line reads `ACTIVE_RUNWAY:<ICAO>:<RUNWAY>:1` for a departure runway and
//! ends in `:0` for an arrival runway. Every line ends with a line feed.

use vstd::prelude::*;
use crate::runway_map::{airports_distinct, Assignments, RunwayMap};
use crate::text::text_chars;

verus! {

/// What every line starts with.
pub const LINE_TAG: &'static str = "ACTIVE_RUNWAY:";

/// One line of the file: the runway in use at an airport, for departures or
/// for arrivals.
#[derive(Debug, PartialEq, Eq)]
pub struct ActiveRunway {
    pub icao: String,
    pub runway: String,
    pub departure: bool,
}

/// An [`ActiveRunway`] as a plain value.
pub struct ActiveRunwayView {
    pub icao: Seq<char>,
    pub runway: Seq<char>,
    pub departure: bool,
}

impl View for ActiveRunway {
    type V = ActiveRunwayView;

    open spec fn view(&self) -> ActiveRunwayView {
        ActiveRunwayView { icao: self.icao@, runway: self.runway@, departure: self.departure }
    }
}

impl DeepView for ActiveRunway {
    type V = ActiveRunwayView;

    open spec fn deep_view(&self) -> ActiveRunwayView {
        self@
    }
}

/// A field that a line can hold and give back: it has neither the colon
/// that parts the fields nor the line feed that ends the line.
pub open spec fn is_field(field: Seq<char>) -> bool {
    forall|i: int| 0 <= i < field.len() ==> field[i] != ':' && field[i] != '\n'
}

impl ActiveRunwayView {
    /// Both names are fields.
    pub open spec fn is_plain(self) -> bool {
        is_field(self.icao) && is_field(self.runway)
    }

    /// The mark of the role at the end of a line.
    pub open spec fn mark(self) -> char {
        if self.departure {
            '1'
        } else {
            '0'
        }
    }
}

/// The line that states one active runway, with the line feed that ends it.
pub open spec fn line(entry: ActiveRunwayView) -> Seq<char> {
    LINE_TAG@ + entry.icao + seq![':'] + entry.runway + seq![':', entry.mark(), '\n']
}

/// The text of a file that states `entries`, line after line.
pub open spec fn render(entries: Seq<ActiveRunwayView>) -> Seq<char>
    decreases entries.len(),
{
    if entries.len() == 0 {
        Seq::empty()
    } else {
        line(entries[0]) + render(entries.drop_first())
    }
}

/// The entries that a list of airports and runways makes for one role.
pub open spec fn entries_of(pairs: Assignments, departure: bool) -> Seq<ActiveRunwayView> {
    Seq::new(
        pairs.len(),
        |i: int| ActiveRunwayView { icao: pairs[i].0, runway: pairs[i].1, departure },
    )
}

/// The entries that a file states for the departure runways `dep` and the
/// arrival runways `arr`: those for departures first.
pub open spec fn written(dep: Assignments, arr: Assignments) -> Seq<ActiveRunwayView> {
    entries_of(dep, true) + entries_of(arr, false)
}

/// Every airport and every runway of the list is a field.
pub open spec fn are_fields(pairs: Assignments) -> bool {
    forall|i: int|
        0 <= i < pairs.len() ==> is_field((#[trigger] pairs[i]).0) && is_field(pairs[i].1)
}

/// Where `c` first stands in `s`, or the length of `s` where it does not
/// stand in it.
pub open spec fn find(s: Seq<char>, c: char) -> nat
    decreases s.len(),
{
    if s.len() == 0 || s[0] == c {
        0
    } else {
        1 + find(s.drop_first(), c)
    }
}

/// What one line states, the line feed taken off: the tag, then the airport
/// up to the next colon, the runway up to the next, and a mark of one
/// character for the role.
pub open spec fn spec_parse_line(line: Seq<char>) -> Option<ActiveRunwayView> {
    let tag = LINE_TAG@;
    if line.len() < tag.len() || line.take(tag.len() as int) != tag {
        None
    } else {
        let named = line.skip(tag.len() as int);
        let first = find(named, ':');
        if first >= named.len() {
            None
        } else {
            let rest = named.skip(first as int + 1);
            let second = find(rest, ':');
            if second >= rest.len() {
                None
            } else {
                let icao = named.take(first as int);
                let runway = rest.take(second as int);
                let mark = rest.skip(second as int + 1);
                if mark == seq!['1'] {
                    Some(ActiveRunwayView { icao, runway, departure: true })
                } else if mark == seq!['0'] {
                    Some(ActiveRunwayView { icao, runway, departure: false })
                } else {
                    None
                }
            }
        }
    }
}

/// What a file states, line by line in the order of the file; `None` where
/// a line states nothing or lacks its line feed.
pub open spec fn spec_parse(text: Seq<char>) -> Option<Seq<ActiveRunwayView>>
    decreases text.len(),
{
    if text.len() == 0 {
        Some(Seq::empty())
    } else {
        let end = find(text, '\n');
        if end >= text.len() {
            None
        } else {
            match spec_parse_line(text.take(end as int)) {
                None => None,
                Some(entry) => match spec_parse(text.skip(end as int + 1)) {
                    None => None,
                    Some(entries) => Some(seq![entry] + entries),
                },
            }
        }
    }
}

/// `find` gives the position before which `c` does not stand and at which
/// it does, or at which `s` ends.
pub proof fn lemma_find(s: Seq<char>, c: char, at: int)
    requires
        0 <= at <= s.len(),
        forall|j: int| 0 <= j < at ==> s[j] != c,
        at < s.len() ==> s[at] == c,
    ensures
        find(s, c) == at,
    decreases at,
{
    if at > 0 {
        lemma_find(s.drop_first(), c, at - 1);
    }
}

/// A file states one entry more by one line more at its end.
pub proof fn lemma_render_push(entries: Seq<ActiveRunwayView>, entry: ActiveRunwayView)
    ensures
        render(entries.push(entry)) == render(entries) + line(entry),
    decreases entries.len(),
{
    if entries.len() == 0 {
        assert(entries.push(entry).drop_first() == Seq::<ActiveRunwayView>::empty());
        assert(render(entries.push(entry)) == line(entry) + render(Seq::empty()));
    } else {
        assert(entries.push(entry).drop_first() == entries.drop_first().push(entry));
        lemma_render_push(entries.drop_first(), entry);
    }
}

/// The text of two files one after the other states the entries of both.
pub proof fn lemma_render_concat(first: Seq<ActiveRunwayView>, second: Seq<ActiveRunwayView>)
    ensures
        render(first + second) == render(first) + render(second),
    decreases second.len(),
{
    if second.len() == 0 {
        assert(first + second == first);
    } else {
        let front = second.drop_last();
        lemma_render_concat(first, front);
        lemma_render_push(first + front, second.last());
        lemma_render_push(front, second.last());
        assert(front.push(second.last()) == second);
    }
}

/// A line gives back the entry it was written from.
pub proof fn lemma_line_reads_back(entry: ActiveRunwayView)
    requires
        entry.is_plain(),
    ensures
        line(entry).len() > 0,
        line(entry).last() == '\n',
        forall|j: int| 0 <= j < line(entry).len() - 1 ==> line(entry)[j] != '\n',
        spec_parse_line(line(entry).drop_last()) == Some(entry),
{
    reveal_strlit("ACTIVE_RUNWAY:");
    let tag = LINE_TAG@;
    let whole = line(entry);
    let bare = whole.drop_last();
    assert(bare.take(tag.len() as int) == tag);
    let named = bare.skip(tag.len() as int);
    assert(named == entry.icao + seq![':'] + entry.runway + seq![':', entry.mark()]);
    lemma_find(named, ':', entry.icao.len() as int);
    let rest = named.skip(entry.icao.len() as int + 1);
    assert(rest == entry.runway + seq![':', entry.mark()]);
    lemma_find(rest, ':', entry.runway.len() as int);
    assert(named.take(entry.icao.len() as int) == entry.icao);
    assert(rest.take(entry.runway.len() as int) == entry.runway);
    assert(rest.skip(entry.runway.len() as int + 1) == seq![entry.mark()]);
    assert(seq!['1'][0] != seq!['0'][0]);
}

/// Reading a written file gives back the entries it was written from, in
/// the order in which they were written, provided that no name holds a
/// colon or a line feed.
pub proof fn lemma_file_reads_back(entries: Seq<ActiveRunwayView>)
    requires
        forall|i: int| 0 <= i < entries.len() ==> (#[trigger] entries[i]).is_plain(),
    ensures
        spec_parse(render(entries)) == Some(entries),
    decreases entries.len(),
{
    if entries.len() > 0 {
        let head = line(entries[0]);
        let tail = render(entries.drop_first());
        let text = render(entries);
        lemma_line_reads_back(entries[0]);
        lemma_file_reads_back(entries.drop_first());
        assert forall|j: int| 0 <= j < head.len() implies text[j] == head[j] by {}
        lemma_find(text, '\n', head.len() - 1);
        assert(text.take(head.len() - 1) == head.drop_last());
        assert(text.skip(head.len() as int) == tail);
        assert(seq![entries[0]] + entries.drop_first() == entries);
    }
}

/// Writing the selections of a run and reading the file again gives back
/// every airport with its runway and its role, provided that no name holds
/// a colon or a line feed.
pub proof fn lemma_written_file_reads_back(dep: Assignments, arr: Assignments)
    requires
        are_fields(dep),
        are_fields(arr),
    ensures
        spec_parse(render(written(dep, arr))) == Some(written(dep, arr)),
{
    let entries = written(dep, arr);
    assert forall|i: int| 0 <= i < entries.len() implies (#[trigger] entries[i]).is_plain() by {
        if i < dep.len() {
            assert(is_field(dep[i].0) && is_field(dep[i].1));
        } else {
            assert(is_field(arr[i - dep.len()].0) && is_field(arr[i - dep.len()].1));
        }
    }
    lemma_file_reads_back(entries);
}

/// The order of the lines makes no difference to what is read but its
/// order: two files written from the same entries, each as often in the one
/// as in the other, read back as the same entries, each as often.
pub proof fn lemma_reading_is_order_independent(
    first: Seq<ActiveRunwayView>,
    second: Seq<ActiveRunwayView>,
)
    requires
        forall|i: int| 0 <= i < first.len() ==> (#[trigger] first[i]).is_plain(),
        forall|i: int| 0 <= i < second.len() ==> (#[trigger] second[i]).is_plain(),
        first.to_multiset() == second.to_multiset(),
    ensures
        spec_parse(render(first)) is Some,
        spec_parse(render(second)) is Some,
        spec_parse(render(first)).unwrap().to_multiset() == spec_parse(
            render(second),
        ).unwrap().to_multiset(),
{
    lemma_file_reads_back(first);
    lemma_file_reads_back(second);
}

/// Where no airport stands twice among the departures and none twice among
/// the arrivals, the file states no entry twice: it has one line for an
/// airport and a role.
pub proof fn lemma_one_line_for_airport_and_role(dep: Assignments, arr: Assignments)
    requires
        airports_distinct(dep),
        airports_distinct(arr),
    ensures
        written(dep, arr).no_duplicates(),
        forall|i: int, j: int|
            0 <= i < j < written(dep, arr).len() ==> written(dep, arr)[i].icao != written(
                dep,
                arr,
            )[j].icao || written(dep, arr)[i].departure != written(dep, arr)[j].departure,
{
    let entries = written(dep, arr);
    assert forall|i: int, j: int| 0 <= i < j < entries.len() implies entries[i].icao
        != entries[j].icao || entries[i].departure != entries[j].departure by {
        if j < dep.len() {
            assert(entries[i].icao == dep[i].0 && entries[j].icao == dep[j].0);
        } else if i >= dep.len() {
            let (a, b) = (i - dep.len(), j - dep.len());
            assert(entries[i].icao == arr[a].0 && entries[j].icao == arr[b].0);
        } else {
            assert(entries[i].departure && !entries[j].departure);
        }
    }
}

/// Where `c` first stands among the characters from `from` up to `to`, or
/// `to` where it does not stand among them.
fn find_between(chars: &Vec<char>, from: usize, to: usize, c: char) -> (at: usize)
    requires
        from <= to <= chars.len(),
    ensures
        from <= at <= to,
        at - from == find(chars@.subrange(from as int, to as int), c),
{
    let mut at: usize = from;
    while at < to && chars[at] != c
        invariant
            from <= at <= to <= chars.len(),
            forall|j: int| from <= j < at ==> chars[j] != c,
        decreases to - at,
    {
        at += 1;
    }
    proof {
        lemma_find(chars@.subrange(from as int, to as int), c, at - from);
    }
    at
}

/// Reads the line that the characters from `from` up to `to` make up.
fn parse_line(
    text: &str,
    chars: &Vec<char>,
    tag: &Vec<char>,
    from: usize,
    to: usize,
) -> (entry: Option<ActiveRunway>)
    requires
        chars@ == text@,
        tag@ == LINE_TAG@,
        from <= to <= chars.len(),
    ensures
        entry.deep_view() == spec_parse_line(chars@.subrange(from as int, to as int)),
{
    let ghost line = chars@.subrange(from as int, to as int);
    let t: usize = tag.len();
    if to - from < t {
        return None;
    }
    let mut k: usize = 0;
    while k < t
        invariant
            t == tag.len(),
            k <= t <= to - from,
            from <= to <= chars.len(),
            tag@ == LINE_TAG@,
            line == chars@.subrange(from as int, to as int),
            forall|j: int| 0 <= j < k ==> line[j] == tag[j],
        decreases t - k,
    {
        if chars[from + k] != tag[k] {
            assert(line.take(t as int)[k as int] != tag@[k as int]);
            return None;
        }
        k += 1;
    }
    assert(line.take(t as int) == tag@);
    let names: usize = from + t;
    let first: usize = find_between(chars, names, to, ':');
    let ghost named = line.skip(t as int);
    assert(named == chars@.subrange(names as int, to as int));
    if first == to {
        return None;
    }
    let second: usize = find_between(chars, first + 1, to, ':');
    let ghost rest = named.skip((first - names) as int + 1);
    assert(rest == chars@.subrange(first as int + 1, to as int));
    if second == to {
        return None;
    }
    let ghost mark = rest.skip((second - first - 1) as int + 1);
    assert(mark == chars@.subrange(second as int + 1, to as int));
    assert(named.take((first - names) as int) == text@.subrange(names as int, first as int));
    assert(rest.take((second - first - 1) as int)
        == text@.subrange(first as int + 1, second as int));
    if to - second != 2 {
        return None;
    }
    let departure = if chars[second + 1] == '1' {
        assert(mark == seq!['1']);
        true
    } else if chars[second + 1] == '0' {
        assert(mark == seq!['0']);
        false
    } else {
        assert(mark[0] != seq!['1'][0] && mark[0] != seq!['0'][0]);
        return None;
    };
    let icao = String::from_str(text.substring_char(names, first));
    let runway = String::from_str(text.substring_char(first + 1, second));
    Some(ActiveRunway { icao, runway, departure })
}

/// Reads an active-runway file: what its lines state, in their order.
/// Nothing is read from a file with a line that states no active runway,
/// or whose last line lacks its line feed.
pub fn parse(text: &str) -> (entries: Option<Vec<ActiveRunway>>)
    ensures
        entries.deep_view() == spec_parse(text@),
{
    let chars = text_chars(text);
    let tag = text_chars(LINE_TAG);
    let n: usize = chars.len();
    let mut entries: Vec<ActiveRunway> = Vec::new();
    let mut from: usize = 0;
    assert(text@.skip(0) == text@);
    assert forall|rest: Seq<ActiveRunwayView>| #[trigger] (entries.deep_view() + rest) == rest by {
        assert(entries.deep_view() + rest =~= rest);
    }
    while from < n
        invariant
            chars@ == text@,
            tag@ == LINE_TAG@,
            from <= n == chars.len(),
            spec_parse(text@) == match spec_parse(text@.skip(from as int)) {
                None => None::<Seq<ActiveRunwayView>>,
                Some(rest) => Some(entries.deep_view() + rest),
            },
        decreases n - from,
    {
        let ghost remaining = text@.skip(from as int);
        let ghost before = entries.deep_view();
        let end: usize = find_between(&chars, from, n, '\n');
        if end == n {
            return None;
        }
        assert(remaining.take((end - from) as int) == chars@.subrange(from as int, end as int));
        assert(remaining.skip((end - from) as int + 1) == text@.skip(end as int + 1));
        match parse_line(text, &chars, &tag, from, end) {
            None => {
                return None;
            },
            Some(entry) => {
                let ghost stated = entry@;
                entries.push(entry);
                assert(entries.deep_view() == before.push(stated));
                assert forall|rest: Seq<ActiveRunwayView>|
                    before + (seq![stated] + rest) == #[trigger] (before.push(stated) + rest) by {
                    assert(before + (seq![stated] + rest) =~= before.push(stated) + rest);
                }
            },
        }
        from = end + 1;
    }
    Some(entries)
}

/// Appends to `text` the lines for one role.
fn write_role(text: &mut String, pairs: &Vec<(String, String)>, departure: bool)
    ensures
        final(text)@ == old(text)@ + render(entries_of(pairs.deep_view(), departure)),
{
    let ghost entries = entries_of(pairs.deep_view(), departure);
    let n: usize = pairs.len();
    let mut i: usize = 0;
    while i < n
        invariant
            n == pairs.len(),
            i <= n,
            entries == entries_of(pairs.deep_view(), departure),
            text@ == old(text)@ + render(entries.take(i as int)),
        decreases n - i,
    {
        proof {
            lemma_render_push(entries.take(i as int), entries[i as int]);
            assert(entries.take(i as int).push(entries[i as int]) == entries.take(i + 1));
            reveal_strlit(":");
            reveal_strlit(":1\n");
            reveal_strlit(":0\n");
        }
        text.append(LINE_TAG);
        text.append(pairs[i].0.as_str());
        text.append(":");
        text.append(pairs[i].1.as_str());
        if departure {
            text.append(":1\n");
        } else {
            text.append(":0\n");
        }
        i += 1;
    }
    assert(entries.take(n as int) == entries);
}

/// The text of the active-runway file: a line for each airport's departure
/// runway, then a line for each airport's arrival runway, the airports of
/// each mapping in the order in which they were entered.
///
/// No line comes twice. Where no name holds a colon or a line feed, reading
/// the text gives back what was written.
pub fn write(dep: &RunwayMap, arr: &RunwayMap) -> (text: String)
    requires
        dep.wf(),
        arr.wf(),
    ensures
        text@ == render(written(dep.pairs(), arr.pairs())),
        written(dep.pairs(), arr.pairs()).no_duplicates(),
        are_fields(dep.pairs()) && are_fields(arr.pairs()) ==> spec_parse(text@) == Some(
            written(dep.pairs(), arr.pairs()),
        ),
{
    let mut text = String::new();
    write_role(&mut text, dep.as_pairs(), true);
    write_role(&mut text, arr.as_pairs(), false);
    proof {
        lemma_render_concat(entries_of(dep.pairs(), true), entries_of(arr.pairs(), false));
        lemma_one_line_for_airport_and_role(dep.pairs(), arr.pairs());
        if are_fields(dep.pairs()) && are_fields(arr.pairs()) {
            lemma_written_file_reads_back(dep.pairs(), arr.pairs());
        }
    }
    text
}

} // verus!
